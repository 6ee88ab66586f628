//! Drawable shapes, the decoders' caches and the renderers.

pub mod context;
pub mod bar;
pub mod circle;
pub mod text;
pub mod blur;
pub mod toif;
pub mod jpeg;
pub mod snake;
pub mod base;
pub mod pool;
pub mod render;
pub mod tiling;
pub mod zlib_cache;
pub mod jpeg_cache;

pub use bar::Bar;
pub use base::Shape;
pub use blur::Blurring;
pub use circle::Circle;
pub use context::DrawingContext;
pub use jpeg::JpegImage;
pub use render::{DirectRenderer, ProgressiveRenderer, Renderer};
pub use snake::Snake;
pub use text::Text;
pub use toif::ToifImage;
