//! Turns decoded video frames into an evenly time-spaced set of PNG previews,
//! and drives the handling of one "process this video" event.
pub mod dispatch;
pub mod encode;
pub mod error;
pub mod event;
pub mod extract;
pub mod raster;
pub mod sampler;
