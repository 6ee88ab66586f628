//! Software rendering core of a small trusted-display user interface:
//! geometry, pixel surfaces, drawable shapes, renderers and the bookkeeping
//! of the streaming decoders that feed them, with the small helpers of the
//! panel's text and backlight layer.

pub mod geometry;
pub mod viewport;
pub mod display;
pub mod backlight;
pub mod octant;
pub mod gdc;
pub mod canvas;
pub mod toif;
pub mod shape;
