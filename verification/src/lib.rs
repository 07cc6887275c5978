//! Verified core of a Mandelbrot explorer: the escape-time raster, the
//! navigation state machine, and frame-rate bookkeeping.

pub mod animate;
pub mod raster;
pub mod shader;
pub mod stats;
