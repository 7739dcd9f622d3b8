//! Raster core of a placeholder image viewer.
//!
//! The crate synthesises an RGBA8 source image (a checkerboard, a gradient or
//! a text banner set in a 5×5 bitmap font), stamps calibration marks on it,
//! and resamples a zoomed and panned window of it into an output buffer.
//!
//! Every quantity is an integer. Zoom and pan are fixed-point numbers counted
//! in thousandths (see [`compositor::ZOOM_UNIT`]); text is measured in
//! characters, never in bytes.

pub mod buffer;
pub mod glyph;
pub mod font;
pub mod text;
pub mod pattern;
pub mod compositor;
pub mod renderer;

pub use buffer::PixelBuffer;
pub use buffer::Rgb;
pub use buffer::Rgba;
pub use glyph::Glyph;
pub use pattern::PatternType;
pub use renderer::ImageRenderer;
