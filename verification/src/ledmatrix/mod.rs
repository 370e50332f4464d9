//! The 32x8 LED display: the frame buffer, a small bitmap font, the drawing
//! primitives built on them and the screens of the dashboard.

pub mod api;
pub mod compositor;
pub mod digits;
pub mod screens;
