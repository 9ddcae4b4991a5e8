//! Capture-card companion library: pixel formats, frame drawing, crop
//! geometry, phase detection rules and their decision logic.

pub mod audio;
pub mod hardware;
pub mod inference;
pub mod text_match;
pub mod video;
