//! Pixel-coverage and depth-resolution core of a software triangle
//! rasterizer.
//!
//! Scalar samples (barycentric weights, depths) are fixed-point integers:
//! `UNIT` stands for one. A tile is an 8x8 block of lanes; a 64-bit mask
//! records which lanes a triangle covers; a quad composes four sub-units
//! into a square four times the area, and a tile group is the 32x32-pixel
//! unit of work a caller owns.

pub mod bits;
pub mod scalar;
mod ext;
pub mod caps;
pub mod eval;
pub mod grid;
pub mod group;
pub mod lane;
pub mod laws;
pub mod mask;
pub mod quad;
pub mod raster;
pub mod tile;
