//! Textured and lit surfaces: images of the `image` crate read texel by
//! texel, and the diffuse lighting that fragment stages apply to them.
use crate::scalar::Real;
use crate::vector::{Vec2, Vec3, Vec4};
use image::GenericImageView;
use vstd::prelude::*;

verus! {

/// The light that reaches every surface whatever its direction: 0.4.
pub const AMBIENT_RAW: i64 = 1717986918;

/// How far the last texel column and row stay below the far end of the
/// texture coordinates: 0.001.
pub const TEXEL_MARGIN_RAW: i64 = 4294967;

/// One texel: red, green, blue and alpha.
pub type Texel = (u8, u8, u8, u8);

/// An image of the `image` crate, decoded and held in memory.
#[verifier::external_type_specification]
#[verifier::external_body]
pub struct ExDynamicImage(image::DynamicImage);

/// The width and the height of an image, in texels.
pub uninterp spec fn dimensions(img: image::DynamicImage) -> (u32, u32);

/// The texels of an image by column and row, counted from the top left.
pub uninterp spec fn texels(img: image::DynamicImage) -> Map<(int, int), Texel>;

/// `image::GenericImageView::dimensions` of a `DynamicImage`: the number of
/// texel columns and of texel rows. It is taken on trust that the call
/// returns the pair that `dimensions` names.
#[verifier::external_body]
fn texture_dimensions(img: &image::DynamicImage) -> (r: (u32, u32))
    ensures
        r == dimensions(*img),
{
    img.dimensions()
}

/// `image::GenericImageView::get_pixel` of a `DynamicImage`: the texel in
/// column `x` and row `y`, converted to eight-bit red, green, blue and
/// alpha. The call panics outside the image, which the precondition
/// excludes; it is taken on trust that inside it returns the texel that
/// `texels` names.
#[verifier::external_body]
fn texel(img: &image::DynamicImage, x: u32, y: u32) -> (r: Texel)
    requires
        x < dimensions(*img).0,
        y < dimensions(*img).1,
    ensures
        r == texels(*img)[(x as int, y as int)],
{
    let p = img.get_pixel(x, y).0;
    (p[0], p[1], p[2], p[3])
}

/// The texel column and row for texture coordinates that run from zero to
/// one over a texture of `width` by `height` texels: each coordinate is
/// scaled by the size less the margin, and the fraction is dropped.
pub open spec fn texel_position_spec(tex: Vec2, width: u32, height: u32) -> (u32, u32) {
    (
        tex.x.mul(Real::from_int_spec(width as int).sub(Real { raw: TEXEL_MARGIN_RAW })).to_u32(),
        tex.y.mul(Real::from_int_spec(height as int).sub(Real { raw: TEXEL_MARGIN_RAW })).to_u32(),
    )
}

#[verifier::when_used_as_spec(texel_position_spec)]
pub fn texel_position(tex: Vec2, width: u32, height: u32) -> (r: (u32, u32))
    ensures
        r == texel_position_spec(tex, width, height),
{
    (
        tex.x.mul(Real::from_int(width as i64).sub(Real { raw: TEXEL_MARGIN_RAW })).to_u32(),
        tex.y.mul(Real::from_int(height as i64).sub(Real { raw: TEXEL_MARGIN_RAW })).to_u32(),
    )
}

/// Whether the texture coordinates fall on a texel of the image.
pub open spec fn on_texture(img: image::DynamicImage, tex: Vec2) -> bool {
    let at = texel_position_spec(tex, dimensions(img).0, dimensions(img).1);
    at.0 < dimensions(img).0 && at.1 < dimensions(img).1
}

/// The texel of the image that the texture coordinates fall on.
pub open spec fn sample_spec(img: image::DynamicImage, tex: Vec2) -> Texel {
    let at = texel_position_spec(tex, dimensions(img).0, dimensions(img).1);
    texels(img)[(at.0 as int, at.1 as int)]
}

/// Reads the texel at texture coordinates that fall on the image.
pub fn sample(img: &image::DynamicImage, tex: Vec2) -> (r: Texel)
    requires
        on_texture(*img, tex),
    ensures
        r == sample_spec(*img, tex),
{
    let size: (u32, u32) = texture_dimensions(img);
    let at: (u32, u32) = texel_position(tex, size.0, size.1);
    texel(img, at.0, at.1)
}

/// Reads the texel at texture coordinates, if they fall on the image.
pub fn try_sample(img: &image::DynamicImage, tex: Vec2) -> (r: Option<Texel>)
    ensures
        on_texture(*img, tex) ==> r == Some(sample_spec(*img, tex)),
        !on_texture(*img, tex) ==> r is None,
{
    let size: (u32, u32) = texture_dimensions(img);
    let at: (u32, u32) = texel_position(tex, size.0, size.1);
    if at.0 < size.0 && at.1 < size.1 {
        Some(sample(img, tex))
    } else {
        None
    }
}

/// The light on a surface with the given normal from a light in the given
/// direction: the part of the light that falls along the normal, none for
/// a surface that faces away, and the ambient light on top.
pub open spec fn light_level_spec(normal: Vec3, light: Vec3) -> Real {
    normal.dot(light).max(Real::zero()).add(Real { raw: AMBIENT_RAW })
}

#[verifier::when_used_as_spec(light_level_spec)]
pub fn light_level(normal: Vec3, light: Vec3) -> (r: Real)
    ensures
        r == light_level_spec(normal, light),
{
    normal.dot(light).max(Real::zero()).add(Real { raw: AMBIENT_RAW })
}

/// The colour of a texel under light of the given level: each channel
/// as a fraction of 255, times the level.
pub open spec fn lit_spec(texel: Texel, level: Real) -> Vec4 {
    Vec4 {
        x: Real::ratio_spec(texel.0 as i64, 255).mul(level),
        y: Real::ratio_spec(texel.1 as i64, 255).mul(level),
        z: Real::ratio_spec(texel.2 as i64, 255).mul(level),
        w: Real::ratio_spec(texel.3 as i64, 255).mul(level),
    }
}

#[verifier::when_used_as_spec(lit_spec)]
pub fn lit(texel: Texel, level: Real) -> (r: Vec4)
    ensures
        r == lit_spec(texel, level),
{
    Vec4 {
        x: Real::ratio(texel.0 as i64, 255).mul(level),
        y: Real::ratio(texel.1 as i64, 255).mul(level),
        z: Real::ratio(texel.2 as i64, 255).mul(level),
        w: Real::ratio(texel.3 as i64, 255).mul(level),
    }
}

} // verus!
