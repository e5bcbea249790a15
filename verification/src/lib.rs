//! Escape-time fractal rasterization into a raw 16-bit-per-pixel framebuffer.
//!
//! The library turns per-pixel escape data for the Mandelbrot and Julia
//! variants into packed RGB565 pixel values and writes them, bounds-clipped
//! and little-endian, into a borrowed byte buffer laid out with an explicit
//! row stride. The floating-point orbit iteration itself and the display
//! hardware live with the caller; everything from the escape-count encoding
//! to the final byte written is specified and verified here.

pub mod canvas;
pub mod color;
pub mod escape;
pub mod render;
