//! What the recorder is configured with.

use vstd::prelude::*;
use vstd::string::*;

use crate::single::Single;

verus! {

/// Default seconds of footage kept from before a trigger.
pub const DEFAULT_PRE_BUFFER_SECS: u32 = 10;

/// Default seconds recorded after the last trigger.
pub const DEFAULT_POST_BUFFER_SECS: u32 = 15;

/// Bits of the default detection confidence, the single-precision number
/// nearest to three tenths.
pub const DEFAULT_DETECTION_CONFIDENCE: u32 = 0x3e99_999a;

/// Bits of the default motion threshold, the single-precision number nearest
/// to one hundredth.
pub const DEFAULT_MOTION_THRESHOLD: u32 = 0x3c23_d70a;

/// Default directory for recordings.
pub const DEFAULT_OUTPUT_DIR: &'static str = "./recordings";

/// Default model file.
pub const DEFAULT_MODEL_PATH: &'static str = "./models/yolov8n.onnx";

/// The recorder's configuration.
pub struct Config {
    /// Directory recordings are written to.
    pub output_dir: String,
    /// Path to the ONNX model file.
    pub model_path: String,
    /// Camera device (e.g. `/dev/video0`), selected automatically if not set.
    pub camera_device: Option<String>,
    /// Whether inference is kept off GPU accelerators.
    pub force_cpu: bool,
    /// Seconds of footage kept from before a trigger.
    pub pre_buffer_secs: u32,
    /// Seconds recorded after the last trigger.
    pub post_buffer_secs: u32,
    /// Least confidence, from zero to one, of a detection.
    pub detection_confidence: Single,
    /// Changed fraction of the picture, from zero to one, above which the
    /// motion gate trips.
    pub motion_threshold: Single,
    /// Whether a live preview window is shown.
    pub preview: bool,
}

impl Config {
    /// The configured model path.
    pub fn model_path(&self) -> (r: &str)
        ensures
            r@ == self.model_path@,
    {
        self.model_path.as_str()
    }
}

impl Default for Config {
    /// What holds without any flag.
    fn default() -> (r: Config)
        ensures
            r.output_dir@ == DEFAULT_OUTPUT_DIR@,
            r.model_path@ == DEFAULT_MODEL_PATH@,
            r.camera_device is None,
            !r.force_cpu,
            r.pre_buffer_secs == DEFAULT_PRE_BUFFER_SECS,
            r.post_buffer_secs == DEFAULT_POST_BUFFER_SECS,
            r.detection_confidence.bits == DEFAULT_DETECTION_CONFIDENCE,
            r.motion_threshold.bits == DEFAULT_MOTION_THRESHOLD,
            !r.preview,
    {
        Config {
            output_dir: DEFAULT_OUTPUT_DIR.to_owned(),
            model_path: DEFAULT_MODEL_PATH.to_owned(),
            camera_device: None,
            force_cpu: false,
            pre_buffer_secs: DEFAULT_PRE_BUFFER_SECS,
            post_buffer_secs: DEFAULT_POST_BUFFER_SECS,
            detection_confidence: Single { bits: DEFAULT_DETECTION_CONFIDENCE },
            motion_threshold: Single { bits: DEFAULT_MOTION_THRESHOLD },
            preview: false,
        }
    }
}

} // verus!
