//! A software triangle rasterizer with a depth-tested framebuffer and a
//! pluggable vertex/fragment shading pipeline, verified with Verus.
//!
//! All quantities are fixed-point numbers ([`scalar::Real`]): arithmetic is
//! exact up to one rounding per operation and saturates instead of
//! overflowing, so every contract can say precisely what is computed.
//!
//! * [`scalar`] and [`vector`]: numbers and small vectors.
//! * [`utils`]: range remapping and barycentric interpolation of shader outputs.
//! * [`buffer`]: the framebuffer, its depth test and its display conversion.
//! * [`rasterizer`]: per-row coverage of a triangle with the weights of its
//!   corners at both ends of each row.
//! * [`shader`]: shading programs and `draw`.
//! * [`texture`]: texture lookup in decoded images and diffuse lighting.
//! * [`triangle`]: tinted coverage ranges of triangles in the unit square.
pub mod buffer;
pub mod rasterizer;
pub mod scalar;
pub mod shader;
pub mod texture;
pub mod triangle;
pub mod utils;
pub mod vector;

pub use buffer::{Buffer, BufferError};
pub use rasterizer::{Rasterizer, TriangleRasterizer};
pub use scalar::Real;
pub use shader::{Draw, Shader};
pub use utils::{Interpolate, NumLike, Remap};
pub use vector::{Vec2, Vec3, Vec4};
