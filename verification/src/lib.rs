//! Decision logic of a webcam-based motion recorder.
//!
//! A camera and a microphone fill a rolling pre-buffer. When the picture
//! changes, a detector looks for living things in it, and once one has been
//! seen twice a clip is recorded, from before the trigger until some time
//! after the last one. Devices, the detector and the encoder are driven by
//! the application; what to do with what they deliver is decided here.

/// Rolling pre-buffer of recent frames and audio.
pub mod buffer;
/// Camera and audio capture.
pub mod capture;
/// Timing and bookkeeping of a single clip.
pub mod clip_state;
/// Configuration.
pub mod config;
/// Repeat-sighting gate for detections.
pub mod confirmation;
/// Model input and output.
pub mod detect;
/// What the detection loop does on each poll.
pub mod detection_loop;
/// The recording in progress.
pub mod event_lifecycle;
/// Encoder arguments and frame selection.
pub mod ffmpeg;
/// Fitting a picture to the model's input.
pub mod fitting;
/// Decoded frames.
pub mod frame;
/// Camera stall detection.
pub mod liveness;
/// Logging to two places.
pub mod logging;
/// Motion-gate readings.
pub mod motion;
/// Pictures in the vision library's pixel order.
pub mod opencv_utils;
/// Names and places of clips and sidecars.
pub mod paths;
/// Live preview window.
pub mod preview;
/// When the capture stream is rebuilt.
pub mod reconnect;
/// The life of a recorded clip.
pub mod recorder;
/// Single-precision rounding in whole numbers.
pub mod rounding;
/// What a sidecar records.
pub mod sidecar;
/// Single-precision numbers by their bits.
pub mod single;
/// Startup checks.
pub mod startup;
/// Text building blocks.
pub mod text;
/// Monotonic time.
pub mod time;
/// Starting, extending and closing a recording on a poll.
pub mod triggering;
/// From detections to a trigger.
pub mod triggers;
/// Shutdown handshake with the writer.
pub mod writer_drained;
/// Steps of the writer thread.
pub mod writer_loop;
