//! A software rasterizer on integers: a frame buffer, line and triangle
//! rasterization (solid and affine texture-mapped), flat shading, depth
//! ordering and the per-frame decisions of a render loop.
//!
//! Texture coordinates and light intensity are fixed-point integers with
//! sixteen fractional bits; a depth is an integer key that orders it.

pub mod swap;
pub mod color;
pub mod fixed;
pub mod light;
pub mod display;
pub mod line;
pub mod mesh;
pub mod obj;
pub mod render;
pub mod texture;
pub mod triangle;
