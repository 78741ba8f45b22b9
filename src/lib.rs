//! Progressive escape-time fractal rendering: the pixel work list, the
//! grayscale framebuffer and the render loop's decision logic.

pub mod config;
pub mod frame;
pub mod scheduler;
pub mod work;
