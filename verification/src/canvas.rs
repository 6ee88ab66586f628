//! Pixel surfaces: the mathematical model of a surface, the drawing
//! contract shared by the color surfaces, and the surfaces themselves.

pub mod raster;
pub mod arcs;
pub mod shift;
pub mod bluralgo;
pub mod rgb;
pub mod rgb565;
pub mod rgba8888;
pub mod mono;
pub mod mono1;
pub mod mono4;
pub mod display;

pub use crate::viewport::Viewport;
