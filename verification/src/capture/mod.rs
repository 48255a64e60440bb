//! Camera and audio capture.

pub mod audio;
pub mod camera;
