//! Video frames: packed pixels, crop areas, drawing into pixel buffers.

pub mod buffer;
pub mod capture;
pub mod colorspace;
pub mod crop;
pub mod display;
pub mod pipeline;
pub mod pixel;
pub mod text;
